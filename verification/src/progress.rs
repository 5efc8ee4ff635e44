//! Progress of a transfer as a whole: the per-segment byte counters, their
//! sum, and the throttled reports with speed and remaining time.

use vstd::prelude::*;
use vstd::string::*;
use crate::text::{decimal, push_decimal};

verus! {

/// Milliseconds that pass, at least, between two progress reports.
pub const PROGRESS_INTERVAL_MILLIS: u64 = 200;

/// One progress report.
#[derive(Clone, Copy, Debug, PartialEq, Eq, Structural)]
pub struct Progress {
    /// Bytes on disk so far, over all segments.
    pub downloaded: u64,
    /// Size of the resource; zero when unknown.
    pub total_bytes: u64,
    /// Bytes per second over the time since the last report; `None` in the
    /// report that opens a resumed transfer.
    pub speed: Option<u64>,
    /// Seconds left at that speed; `None` unless the transfer is moving
    /// towards a known size.
    pub eta_secs: Option<u64>,
    /// Whether the transfer runs in parallel segments.
    pub parallel: bool,
}

/// The sum of the counters.
pub open spec fn sum_of(counters: Seq<u64>) -> nat
    decreases counters.len(),
{
    if counters.len() == 0 {
        0
    } else {
        sum_of(counters.drop_last()) + counters.last() as nat
    }
}

/// `n`, or the largest `u64` if `n` does not fit.
pub open spec fn clamp_u64(n: nat) -> u64 {
    if n > u64::MAX {
        u64::MAX
    } else {
        n as u64
    }
}

/// Bytes gained since the last report; zero if the count went down.
pub open spec fn gained(downloaded: u64, last_total: u64) -> nat {
    if downloaded >= last_total {
        (downloaded - last_total) as nat
    } else {
        0
    }
}

/// Whole bytes per second when `delta` bytes took `elapsed_millis`.
pub open spec fn speed_of(delta: nat, elapsed_millis: nat) -> nat
    recommends
        elapsed_millis > 0,
{
    delta * 1000 / elapsed_millis
}

/// Whole seconds that `remaining` bytes take at `delta` bytes per
/// `elapsed_millis`.
pub open spec fn eta_of(remaining: nat, delta: nat, elapsed_millis: nat) -> nat
    recommends
        delta > 0,
{
    remaining * elapsed_millis / (delta * 1000)
}

/// The report for a transfer that holds `downloaded` of `total_bytes` bytes,
/// held `last_total` at the last report, `elapsed_millis` ago. Speed is that
/// of the last interval alone. The remaining time is defined only while
/// bytes are arriving and the known size has not been reached.
pub open spec fn report_for(
    downloaded: u64,
    last_total: u64,
    total_bytes: u64,
    elapsed_millis: u64,
    parallel: bool,
) -> Progress {
    let delta = gained(downloaded, last_total);
    Progress {
        downloaded,
        total_bytes,
        speed: Some(clamp_u64(speed_of(delta, elapsed_millis as nat))),
        eta_secs: if total_bytes > 0 && delta > 0 && downloaded < total_bytes {
            Some(clamp_u64(eta_of((total_bytes - downloaded) as nat, delta, elapsed_millis as nat)))
        } else {
            None
        },
        parallel,
    }
}

/// Computes one report; `elapsed_millis` must not be zero.
pub fn make_report(
    downloaded: u64,
    last_total: u64,
    total_bytes: u64,
    elapsed_millis: u64,
    parallel: bool,
) -> (report: Progress)
    requires
        elapsed_millis > 0,
    ensures
        report == report_for(downloaded, last_total, total_bytes, elapsed_millis, parallel),
{
    let delta: u64 = if downloaded >= last_total {
        downloaded - last_total
    } else {
        0
    };
    assert(delta * 1000 <= u64::MAX * 1000) by (nonlinear_arith)
        requires
            delta <= u64::MAX,
    ;
    let per_sec: u128 = (delta as u128 * 1000) / (elapsed_millis as u128);
    let speed: u64 = if per_sec > u64::MAX as u128 {
        u64::MAX
    } else {
        per_sec as u64
    };
    let eta_secs: Option<u64> = if total_bytes > 0 && delta > 0 && downloaded < total_bytes {
        let remaining: u64 = total_bytes - downloaded;
        assert(remaining * elapsed_millis <= u64::MAX * u64::MAX) by (nonlinear_arith)
            requires
                remaining <= u64::MAX,
                elapsed_millis <= u64::MAX,
        ;
        let secs: u128 = (remaining as u128 * elapsed_millis as u128) / (delta as u128 * 1000);
        if secs > u64::MAX as u128 {
            Some(u64::MAX)
        } else {
            Some(secs as u64)
        }
    } else {
        None
    };
    Progress { downloaded, total_bytes, speed: Some(speed), eta_secs, parallel }
}

/// The report that opens a resumed transfer, before any new byte: what is on
/// disk already, with no speed and no remaining time. There is none when
/// nothing is on disk or the size is unknown.
pub fn resume_report(downloaded: u64, total_bytes: u64, parallel: bool) -> (report: Option<Progress>)
    ensures
        report == if downloaded > 0 && total_bytes > 0 {
            Some(Progress { downloaded, total_bytes, speed: None, eta_secs: None, parallel })
        } else {
            None
        },
{
    if downloaded > 0 && total_bytes > 0 {
        Some(Progress { downloaded, total_bytes, speed: None, eta_secs: None, parallel })
    } else {
        None
    }
}

/// A sum is at least the sum of any of its prefixes.
proof fn lemma_sum_prefix(counters: Seq<u64>, k: int)
    requires
        0 <= k <= counters.len(),
    ensures
        sum_of(counters.subrange(0, k)) <= sum_of(counters),
    decreases counters.len(),
{
    if k == counters.len() {
        assert(counters.subrange(0, k) =~= counters);
    } else {
        lemma_sum_prefix(counters.drop_last(), k);
        assert(counters.drop_last().subrange(0, k) =~= counters.subrange(0, k));
    }
}

/// Replacing one counter changes the sum by the difference.
pub proof fn lemma_sum_update(counters: Seq<u64>, index: int, value: u64)
    requires
        0 <= index < counters.len(),
    ensures
        sum_of(counters.update(index, value)) == sum_of(counters) - counters[index] + value,
    decreases counters.len(),
{
    let updated = counters.update(index, value);
    if index == counters.len() - 1 {
        assert(updated.drop_last() =~= counters.drop_last());
    } else {
        lemma_sum_update(counters.drop_last(), index, value);
        assert(updated.drop_last() =~= counters.drop_last().update(index, value));
    }
}

/// Combines the byte counters of the segments of one transfer and decides
/// when a progress report is due. The sum of the counters always fits a
/// `u64`.
pub struct ProgressAggregator {
    counters: Vec<u64>,
    total_bytes: u64,
    last_total: u64,
    parallel: bool,
}

impl ProgressAggregator {
    /// The sum of the counters fits a `u64`. Every aggregator satisfies this.
    #[verifier::type_invariant]
    pub closed spec fn wf(&self) -> bool {
        sum_of(self.counters@) <= u64::MAX
    }

    /// The counters, one per segment.
    pub closed spec fn counters(&self) -> Seq<u64> {
        self.counters@
    }

    /// Size of the resource; zero when unknown.
    pub closed spec fn total_bytes(&self) -> u64 {
        self.total_bytes
    }

    /// The sum of the counters when the last report was made.
    pub closed spec fn last_total(&self) -> u64 {
        self.last_total
    }

    /// Whether the transfer runs in parallel segments.
    pub closed spec fn parallel(&self) -> bool {
        self.parallel
    }

    /// An aggregator for a parallel transfer of `segments` segments, all
    /// counters at zero.
    pub fn for_segments(segments: usize, total_bytes: u64) -> (agg: ProgressAggregator)
        ensures
            agg.counters() == Seq::new(segments as nat, |i: int| 0u64),
            agg.total_bytes() == total_bytes,
            agg.last_total() == 0,
            agg.parallel(),
    {
        let mut counters: Vec<u64> = Vec::new();
        let mut i: usize = 0;
        while i < segments
            invariant
                i <= segments,
                counters@.len() == i,
                forall|k: int| 0 <= k < i ==> counters@[k] == 0,
                sum_of(counters@) == 0,
            decreases segments - i,
        {
            let ghost before = counters@;
            counters.push(0);
            assert(counters@.drop_last() =~= before);
            i = i + 1;
        }
        assert(counters@ =~= Seq::new(segments as nat, |i: int| 0u64));
        ProgressAggregator { counters, total_bytes, last_total: 0, parallel: true }
    }

    /// An aggregator for a sequential transfer that starts with `downloaded`
    /// bytes on disk: one counter, which holds them.
    pub fn for_stream(downloaded: u64, total_bytes: u64) -> (agg: ProgressAggregator)
        ensures
            agg.counters() == seq![downloaded],
            agg.total_bytes() == total_bytes,
            agg.last_total() == downloaded,
            !agg.parallel(),
    {
        let mut counters: Vec<u64> = Vec::new();
        counters.push(downloaded);
        assert(counters@ =~= seq![downloaded]);
        assert(counters@.drop_last() =~= Seq::<u64>::empty());
        assert(sum_of(counters@) == downloaded) by {
            reveal_with_fuel(sum_of, 2);
        }
        ProgressAggregator { counters, total_bytes, last_total: downloaded, parallel: false }
    }

    /// Size of the resource; zero when unknown.
    pub fn resource_size(&self) -> (total_bytes: u64)
        ensures
            total_bytes == self.total_bytes(),
    {
        self.total_bytes
    }

    /// Bytes on disk so far: the sum of the counters.
    pub fn total(&self) -> (sum: u64)
        ensures
            sum == sum_of(self.counters()),
    {
        proof {
            use_type_invariant(self);
        }
        let mut sum: u64 = 0;
        let mut i: usize = 0;
        while i < self.counters.len()
            invariant
                i <= self.counters@.len(),
                sum == sum_of(self.counters@.subrange(0, i as int)),
                sum_of(self.counters@) <= u64::MAX,
            decreases self.counters@.len() - i,
        {
            proof {
                lemma_sum_prefix(self.counters@, i as int + 1);
                assert(self.counters@.subrange(0, i as int + 1).drop_last() =~= self.counters@.subrange(
                    0,
                    i as int,
                ));
            }
            sum = sum + self.counters[i];
            i = i + 1;
        }
        assert(self.counters@.subrange(0, i as int) =~= self.counters@);
        sum
    }

    /// Sets the counter of `segment` to `bytes`. Nothing is recorded, and
    /// the result is false, when there is no such segment or the sum would
    /// no longer fit a `u64`.
    pub fn record(&mut self, segment: usize, bytes: u64) -> (recorded: bool)
        ensures
            recorded == (segment < old(self).counters().len() && sum_of(old(self).counters()) - old(
                self,
            ).counters()[segment as int] + bytes <= u64::MAX),
            recorded ==> final(self).counters() == old(self).counters().update(segment as int, bytes),
            !recorded ==> final(self).counters() == old(self).counters(),
            final(self).total_bytes() == old(self).total_bytes(),
            final(self).last_total() == old(self).last_total(),
            final(self).parallel() == old(self).parallel(),
    {
        if segment >= self.counters.len() {
            return false;
        }
        let sum: u64 = self.total();
        let current: u64 = self.counters[segment];
        proof {
            lemma_sum_update(self.counters@, segment as int, bytes);
            lemma_sum_update(self.counters@, segment as int, 0);
        }
        if bytes > u64::MAX - (sum - current) {
            return false;
        }
        let mut counters: Vec<u64> = Vec::new();
        core::mem::swap(&mut self.counters, &mut counters);
        counters.set(segment, bytes);
        core::mem::swap(&mut self.counters, &mut counters);
        true
    }

    /// Makes the report that is due `elapsed_millis` after the last one:
    /// none before `PROGRESS_INTERVAL_MILLIS` have passed, and then the
    /// report of the interval, after which a new interval begins.
    pub fn tick(&mut self, elapsed_millis: u64) -> (report: Option<Progress>)
        ensures
            final(self).counters() == old(self).counters(),
            final(self).total_bytes() == old(self).total_bytes(),
            final(self).parallel() == old(self).parallel(),
            elapsed_millis < PROGRESS_INTERVAL_MILLIS ==> report is None && final(self).last_total() == old(
                self,
            ).last_total(),
            elapsed_millis >= PROGRESS_INTERVAL_MILLIS ==> report == Some(
                report_for(
                    sum_of(old(self).counters()) as u64,
                    old(self).last_total(),
                    old(self).total_bytes(),
                    elapsed_millis,
                    old(self).parallel(),
                ),
            ) && final(self).last_total() == sum_of(old(self).counters()),
    {
        if elapsed_millis < PROGRESS_INTERVAL_MILLIS {
            return None;
        }
        let downloaded: u64 = self.total();
        let report = make_report(downloaded, self.last_total, self.total_bytes, elapsed_millis, self.parallel);
        self.last_total = downloaded;
        Some(report)
    }
}

/// The text of a remaining time of `secs` seconds: hours and minutes from an
/// hour on, minutes and seconds from a minute on, seconds below that, and
/// `< 1s` for less than a second.
pub open spec fn eta_text(secs: u64) -> Seq<char> {
    let hours = (secs / 3600) as nat;
    let minutes = ((secs % 3600) / 60) as nat;
    let seconds = (secs % 60) as nat;
    if hours > 0 {
        decimal(hours) + seq!['h', ' '] + decimal(minutes) + seq!['m', 'i', 'n']
    } else if minutes > 0 {
        decimal(minutes) + seq!['m', 'i', 'n', ' '] + decimal(seconds) + seq!['s']
    } else if seconds > 0 {
        decimal(seconds) + seq!['s']
    } else {
        seq!['<', ' ', '1', 's']
    }
}

/// Writes a remaining time for display.
pub fn format_eta(secs: u64) -> (text: String)
    ensures
        text@ == eta_text(secs),
{
    let hours: u64 = secs / 3600;
    let minutes: u64 = (secs % 3600) / 60;
    let seconds: u64 = secs % 60;
    proof {
        reveal_strlit("h ");
        reveal_strlit("min");
        reveal_strlit("min ");
        reveal_strlit("s");
        reveal_strlit("< 1s");
    }
    let mut text = String::new();
    if hours > 0 {
        push_decimal(&mut text, hours);
        text.append("h ");
        push_decimal(&mut text, minutes);
        text.append("min");
        assert(text@ =~= eta_text(secs));
    } else if minutes > 0 {
        push_decimal(&mut text, minutes);
        text.append("min ");
        push_decimal(&mut text, seconds);
        text.append("s");
        assert(text@ =~= eta_text(secs));
    } else if seconds > 0 {
        push_decimal(&mut text, seconds);
        text.append("s");
        assert(text@ =~= eta_text(secs));
    } else {
        text.append("< 1s");
        assert(text@ =~= eta_text(secs));
    }
    text
}

} // verus!
