//! Statistics of a probing session: counts, streaks, round-trip times, and
//! the accounting of uptime and downtime.
//!
//! Times are microseconds on the session clock (the value 0 is the moment the
//! session started); round-trip times are microseconds too.

use vstd::prelude::*;

verus! {

/// How long from `start` to `now`; zero when `now` is earlier, as
/// `Instant::duration_since` gives it.
pub open spec fn elapsed_since(now: u64, start: u64) -> u64 {
    if now >= start {
        (now - start) as u64
    } else {
        0
    }
}

/// The larger of two durations.
pub open spec fn max_u64(a: u64, b: u64) -> u64 {
    if a >= b {
        a
    } else {
        b
    }
}

/// The smallest element of a nonempty sequence.
pub open spec fn seq_min(s: Seq<u64>) -> u64
    decreases s.len(),
{
    if s.len() <= 1 {
        s[0]
    } else {
        let m = seq_min(s.drop_last());
        if s.last() < m {
            s.last()
        } else {
            m
        }
    }
}

/// The largest element of a nonempty sequence.
pub open spec fn seq_max(s: Seq<u64>) -> u64
    decreases s.len(),
{
    if s.len() <= 1 {
        s[0]
    } else {
        let m = seq_max(s.drop_last());
        if s.last() > m {
            s.last()
        } else {
            m
        }
    }
}

/// The sum of a sequence.
pub open spec fn seq_sum(s: Seq<u64>) -> nat
    decreases s.len(),
{
    if s.len() == 0 {
        0
    } else {
        seq_sum(s.drop_last()) + s.last() as nat
    }
}

/// The abstract state of a `Statistics`.
pub struct StatisticsView {
    pub start_time: u64,
    pub end_time: Option<u64>,
    pub start_of_uptime: Option<u64>,
    pub start_of_downtime: Option<u64>,
    pub last_successful_probe: Option<u64>,
    pub last_unsuccessful_probe: Option<u64>,
    pub rtt_measurements: Seq<u64>,
    pub ongoing_successful_probes: u32,
    pub ongoing_unsuccessful_probes: u32,
    pub total_successful_probes: u32,
    pub total_unsuccessful_probes: u32,
    pub total_downtime: u64,
    pub total_uptime: u64,
    pub longest_uptime: u64,
    pub longest_downtime: u64,
}

impl StatisticsView {
    /// A session that started at `start` and has seen no probe.
    pub open spec fn initial(start: u64) -> Self {
        StatisticsView {
            start_time: start,
            end_time: None,
            start_of_uptime: None,
            start_of_downtime: None,
            last_successful_probe: None,
            last_unsuccessful_probe: None,
            rtt_measurements: Seq::empty(),
            ongoing_successful_probes: 0,
            ongoing_unsuccessful_probes: 0,
            total_successful_probes: 0,
            total_unsuccessful_probes: 0,
            total_downtime: 0,
            total_uptime: 0,
            longest_uptime: 0,
            longest_downtime: 0,
        }
    }

    /// The consistency that every operation keeps: one round-trip time per
    /// success, streaks within totals, at most one streak running, an uptime
    /// (downtime) period open exactly while a success (failure) streak runs,
    /// and the longest period within the total.
    pub open spec fn wf(self) -> bool {
        &&& self.rtt_measurements.len() == self.total_successful_probes
        &&& self.ongoing_successful_probes <= self.total_successful_probes
        &&& self.ongoing_unsuccessful_probes <= self.total_unsuccessful_probes
        &&& (self.ongoing_successful_probes == 0 || self.ongoing_unsuccessful_probes == 0)
        &&& (self.start_of_uptime is Some <==> self.ongoing_successful_probes > 0)
        &&& (self.start_of_downtime is Some <==> self.ongoing_unsuccessful_probes > 0)
        &&& (self.last_successful_probe is Some <==> self.total_successful_probes > 0)
        &&& (self.last_unsuccessful_probe is Some <==> self.total_unsuccessful_probes > 0)
        &&& self.longest_uptime <= self.total_uptime
        &&& self.longest_downtime <= self.total_downtime
    }

    /// The core invariant that every operation keeps on its own: one
    /// round-trip time per success, never an uptime and a downtime period open
    /// together, never two streaks running, and the longest period within the
    /// total. It follows from `wf`.
    pub open spec fn core_invariant(self) -> bool {
        &&& self.rtt_measurements.len() == self.total_successful_probes
        &&& !(self.start_of_uptime is Some && self.start_of_downtime is Some)
        &&& (self.ongoing_successful_probes == 0 || self.ongoing_unsuccessful_probes == 0)
        &&& self.longest_uptime <= self.total_uptime
        &&& self.longest_downtime <= self.total_downtime
    }

    /// Can a success be recorded at `now` without a counter or the downtime
    /// total running out of range?
    pub open spec fn can_record_success(self, now: u64) -> bool {
        &&& self.ongoing_successful_probes < u32::MAX
        &&& self.total_successful_probes < u32::MAX
        &&& (self.start_of_downtime matches Some(ds) ==> self.total_downtime + elapsed_since(now, ds) <= u64::MAX)
    }

    /// Can a failure be recorded at `now` without a counter or the uptime
    /// total running out of range?
    pub open spec fn can_record_failure(self, now: u64) -> bool {
        &&& self.ongoing_unsuccessful_probes < u32::MAX
        &&& self.total_unsuccessful_probes < u32::MAX
        &&& (self.start_of_uptime matches Some(us) ==> self.total_uptime + elapsed_since(now, us) <= u64::MAX)
    }

    /// Can the session be closed at `now` without a total running out of range?
    pub open spec fn can_finalize(self, now: u64) -> bool {
        &&& (self.start_of_uptime matches Some(us) ==> self.total_uptime + elapsed_since(now, us) <= u64::MAX)
        &&& (self.start_of_downtime matches Some(ds) ==> self.total_downtime + elapsed_since(now, ds) <= u64::MAX)
    }

    /// The state after a successful probe with round-trip time `rtt` at `now`:
    /// the success streak grows and the failure streak ends; an open downtime
    /// period is closed (its length added to the total and weighed against the
    /// longest) and an uptime period starts at `now`; an uptime period that is
    /// already open goes on.
    pub open spec fn after_success(self, rtt: u64, now: u64) -> Self {
        StatisticsView {
            ongoing_successful_probes: (self.ongoing_successful_probes + 1) as u32,
            ongoing_unsuccessful_probes: 0,
            total_successful_probes: (self.total_successful_probes + 1) as u32,
            rtt_measurements: self.rtt_measurements.push(rtt),
            last_successful_probe: Some(now),
            start_of_uptime: if self.start_of_uptime is None || self.start_of_downtime is Some {
                Some(now)
            } else {
                self.start_of_uptime
            },
            start_of_downtime: None,
            total_downtime: match self.start_of_downtime {
                Some(ds) => (self.total_downtime + elapsed_since(now, ds)) as u64,
                None => self.total_downtime,
            },
            longest_downtime: match self.start_of_downtime {
                Some(ds) => max_u64(self.longest_downtime, elapsed_since(now, ds)),
                None => self.longest_downtime,
            },
            ..self
        }
    }

    /// The state after a failed probe at `now`, the mirror of `after_success`.
    pub open spec fn after_failure(self, now: u64) -> Self {
        StatisticsView {
            ongoing_unsuccessful_probes: (self.ongoing_unsuccessful_probes + 1) as u32,
            ongoing_successful_probes: 0,
            total_unsuccessful_probes: (self.total_unsuccessful_probes + 1) as u32,
            last_unsuccessful_probe: Some(now),
            start_of_downtime: if self.start_of_downtime is None || self.start_of_uptime is Some {
                Some(now)
            } else {
                self.start_of_downtime
            },
            start_of_uptime: None,
            total_uptime: match self.start_of_uptime {
                Some(us) => (self.total_uptime + elapsed_since(now, us)) as u64,
                None => self.total_uptime,
            },
            longest_uptime: match self.start_of_uptime {
                Some(us) => max_u64(self.longest_uptime, elapsed_since(now, us)),
                None => self.longest_uptime,
            },
            ..self
        }
    }

    /// The state after the session is closed at `now`: the end is recorded
    /// and the open periods are counted up to `now` (they stay open).
    pub open spec fn after_finalize(self, now: u64) -> Self {
        StatisticsView {
            end_time: Some(now),
            total_uptime: match self.start_of_uptime {
                Some(us) => (self.total_uptime + elapsed_since(now, us)) as u64,
                None => self.total_uptime,
            },
            longest_uptime: match self.start_of_uptime {
                Some(us) => max_u64(self.longest_uptime, elapsed_since(now, us)),
                None => self.longest_uptime,
            },
            total_downtime: match self.start_of_downtime {
                Some(ds) => (self.total_downtime + elapsed_since(now, ds)) as u64,
                None => self.total_downtime,
            },
            longest_downtime: match self.start_of_downtime {
                Some(ds) => max_u64(self.longest_downtime, elapsed_since(now, ds)),
                None => self.longest_downtime,
            },
            ..self
        }
    }

    /// The number of probes sent.
    pub open spec fn total_probes(self) -> nat {
        (self.total_successful_probes + self.total_unsuccessful_probes) as nat
    }

    /// The share of failed probes in hundredths of a percent, rounded down
    /// (zero when no probe was sent).
    pub open spec fn packet_loss(self) -> nat {
        if self.total_probes() == 0 {
            0
        } else {
            (self.total_unsuccessful_probes * 10000) as nat / self.total_probes()
        }
    }

    /// The smallest, mean (rounded down) and largest round-trip time; all
    /// zero when no round-trip time was measured.
    pub open spec fn rtt_statistics(self) -> (u64, u64, u64) {
        let s = self.rtt_measurements;
        if s.len() == 0 {
            (0, 0, 0)
        } else {
            (seq_min(s), (seq_sum(s) / s.len()) as u64, seq_max(s))
        }
    }

    /// How long the session lasted: up to its end if it was closed, else up to `now`.
    pub open spec fn total_duration(self, now: u64) -> u64 {
        match self.end_time {
            Some(end) => elapsed_since(end, self.start_time),
            None => elapsed_since(now, self.start_time),
        }
    }
}

/// The figures of a session's statistics at one time, as its reports give
/// them (times in microseconds, the loss in hundredths of a percent).
#[derive(Debug)]
pub struct StatisticsSummary {
    pub total_probes: u64,
    pub successful_probes: u32,
    pub unsuccessful_probes: u32,
    pub packet_loss_percentage: u64,
    pub min_rtt: u64,
    pub avg_rtt: u64,
    pub max_rtt: u64,
    pub total_duration: u64,
    pub longest_uptime: u64,
    pub longest_downtime: u64,
    pub ended: bool,
}

impl StatisticsSummary {
    /// Does this summary give the figures of the session state `m` at time `now`?
    pub open spec fn summarizes(self, m: StatisticsView, now: u64) -> bool {
        &&& self.total_probes == m.total_probes()
        &&& self.successful_probes == m.total_successful_probes
        &&& self.unsuccessful_probes == m.total_unsuccessful_probes
        &&& self.packet_loss_percentage == m.packet_loss()
        &&& (self.min_rtt, self.avg_rtt, self.max_rtt) == m.rtt_statistics()
        &&& self.total_duration == m.total_duration(now)
        &&& self.longest_uptime == m.longest_uptime
        &&& self.longest_downtime == m.longest_downtime
        &&& self.ended == (m.end_time is Some)
    }
}

/// Counts, streaks, round-trip times and uptime/downtime of a probing session.
#[derive(Debug)]
pub struct Statistics {
    pub start_time: u64,
    pub end_time: Option<u64>,
    pub start_of_uptime: Option<u64>,
    pub start_of_downtime: Option<u64>,
    pub last_successful_probe: Option<u64>,
    pub last_unsuccessful_probe: Option<u64>,
    pub rtt_measurements: Vec<u64>,
    pub ongoing_successful_probes: u32,
    pub ongoing_unsuccessful_probes: u32,
    pub total_successful_probes: u32,
    pub total_unsuccessful_probes: u32,
    pub total_downtime: u64,
    pub total_uptime: u64,
    pub longest_uptime: u64,
    pub longest_downtime: u64,
}

impl View for Statistics {
    type V = StatisticsView;

    open spec fn view(&self) -> StatisticsView {
        StatisticsView {
            start_time: self.start_time,
            end_time: self.end_time,
            start_of_uptime: self.start_of_uptime,
            start_of_downtime: self.start_of_downtime,
            last_successful_probe: self.last_successful_probe,
            last_unsuccessful_probe: self.last_unsuccessful_probe,
            rtt_measurements: self.rtt_measurements@,
            ongoing_successful_probes: self.ongoing_successful_probes,
            ongoing_unsuccessful_probes: self.ongoing_unsuccessful_probes,
            total_successful_probes: self.total_successful_probes,
            total_unsuccessful_probes: self.total_unsuccessful_probes,
            total_downtime: self.total_downtime,
            total_uptime: self.total_uptime,
            longest_uptime: self.longest_uptime,
            longest_downtime: self.longest_downtime,
        }
    }
}

/// `elapsed_since` in executable form.
fn duration_since(now: u64, start: u64) -> (d: u64)
    ensures
        d == elapsed_since(now, start),
{
    if now >= start {
        now - start
    } else {
        0
    }
}

impl Clone for Statistics {
    fn clone(&self) -> (c: Self)
        ensures
            c@ == self@,
    {
        let mut rtt_measurements: Vec<u64> = Vec::new();
        let n = self.rtt_measurements.len();
        let mut i: usize = 0;
        while i < n
            invariant
                i <= n,
                n == self.rtt_measurements@.len(),
                rtt_measurements@ == self.rtt_measurements@.take(i as int),
            decreases n - i,
        {
            rtt_measurements.push(self.rtt_measurements[i]);
            proof {
                assert(rtt_measurements@ =~= self.rtt_measurements@.take(i + 1));
            }
            i = i + 1;
        }
        proof {
            assert(self.rtt_measurements@.take(n as int) =~= self.rtt_measurements@);
        }
        Statistics {
            start_time: self.start_time,
            end_time: self.end_time,
            start_of_uptime: self.start_of_uptime,
            start_of_downtime: self.start_of_downtime,
            last_successful_probe: self.last_successful_probe,
            last_unsuccessful_probe: self.last_unsuccessful_probe,
            rtt_measurements,
            ongoing_successful_probes: self.ongoing_successful_probes,
            ongoing_unsuccessful_probes: self.ongoing_unsuccessful_probes,
            total_successful_probes: self.total_successful_probes,
            total_unsuccessful_probes: self.total_unsuccessful_probes,
            total_downtime: self.total_downtime,
            total_uptime: self.total_uptime,
            longest_uptime: self.longest_uptime,
            longest_downtime: self.longest_downtime,
        }
    }
}

impl Default for Statistics {
    fn default() -> (s: Self)
        ensures
            s@ == StatisticsView::initial(0),
    {
        Statistics {
            start_time: 0,
            end_time: None,
            start_of_uptime: None,
            start_of_downtime: None,
            last_successful_probe: None,
            last_unsuccessful_probe: None,
            rtt_measurements: Vec::new(),
            ongoing_successful_probes: 0,
            ongoing_unsuccessful_probes: 0,
            total_successful_probes: 0,
            total_unsuccessful_probes: 0,
            total_downtime: 0,
            total_uptime: 0,
            longest_uptime: 0,
            longest_downtime: 0,
        }
    }
}

impl Statistics {
    /// A session that starts now (time 0 on the session clock).
    pub fn new() -> (s: Self)
        ensures
            s@ == StatisticsView::initial(0),
            s@.wf(),
            s@.core_invariant(),
    {
        Self::default()
    }

    /// Records a successful probe with round-trip time `rtt` at time `now`.
    pub fn record_success(&mut self, rtt: u64, now: u64)
        requires
            old(self)@.can_record_success(now),
        ensures
            final(self)@ == old(self)@.after_success(rtt, now),
            old(self)@.wf() ==> final(self)@.wf(),
            old(self)@.core_invariant() ==> final(self)@.core_invariant(),
    {
        self.ongoing_successful_probes = self.ongoing_successful_probes + 1;
        self.ongoing_unsuccessful_probes = 0;
        self.total_successful_probes = self.total_successful_probes + 1;
        self.rtt_measurements.push(rtt);
        self.last_successful_probe = Some(now);
        if self.start_of_uptime.is_none() {
            self.start_of_uptime = Some(now);
        }
        if let Some(downtime_start) = self.start_of_downtime {
            let downtime_duration = duration_since(now, downtime_start);
            self.total_downtime = self.total_downtime + downtime_duration;
            if downtime_duration > self.longest_downtime {
                self.longest_downtime = downtime_duration;
            }
            self.start_of_downtime = None;
            self.start_of_uptime = Some(now);
        }
    }

    /// Records a failed probe at time `now`.
    pub fn record_failure(&mut self, now: u64)
        requires
            old(self)@.can_record_failure(now),
        ensures
            final(self)@ == old(self)@.after_failure(now),
            old(self)@.wf() ==> final(self)@.wf(),
            old(self)@.core_invariant() ==> final(self)@.core_invariant(),
    {
        self.ongoing_unsuccessful_probes = self.ongoing_unsuccessful_probes + 1;
        self.ongoing_successful_probes = 0;
        self.total_unsuccessful_probes = self.total_unsuccessful_probes + 1;
        self.last_unsuccessful_probe = Some(now);
        if self.start_of_downtime.is_none() {
            self.start_of_downtime = Some(now);
        }
        if let Some(uptime_start) = self.start_of_uptime {
            let uptime_duration = duration_since(now, uptime_start);
            self.total_uptime = self.total_uptime + uptime_duration;
            if uptime_duration > self.longest_uptime {
                self.longest_uptime = uptime_duration;
            }
            self.start_of_uptime = None;
            self.start_of_downtime = Some(now);
        }
    }

    /// Closes the session at time `now`, counting the open period up to `now`.
    pub fn finalize(&mut self, now: u64)
        requires
            old(self)@.can_finalize(now),
        ensures
            final(self)@ == old(self)@.after_finalize(now),
            old(self)@.wf() ==> final(self)@.wf(),
            old(self)@.core_invariant() ==> final(self)@.core_invariant(),
    {
        self.end_time = Some(now);
        if let Some(uptime_start) = self.start_of_uptime {
            let uptime_duration = duration_since(now, uptime_start);
            self.total_uptime = self.total_uptime + uptime_duration;
            if uptime_duration > self.longest_uptime {
                self.longest_uptime = uptime_duration;
            }
        }
        if let Some(downtime_start) = self.start_of_downtime {
            let downtime_duration = duration_since(now, downtime_start);
            self.total_downtime = self.total_downtime + downtime_duration;
            if downtime_duration > self.longest_downtime {
                self.longest_downtime = downtime_duration;
            }
        }
    }

    /// Can a success be recorded at `now` (see `can_record_success`)?
    pub fn can_record_success(&self, now: u64) -> (b: bool)
        ensures
            b == self@.can_record_success(now),
    {
        self.ongoing_successful_probes < u32::MAX && self.total_successful_probes < u32::MAX && match self.start_of_downtime {
            Some(ds) => self.total_downtime <= u64::MAX - duration_since(now, ds),
            None => true,
        }
    }

    /// Can a failure be recorded at `now` (see `can_record_failure`)?
    pub fn can_record_failure(&self, now: u64) -> (b: bool)
        ensures
            b == self@.can_record_failure(now),
    {
        self.ongoing_unsuccessful_probes < u32::MAX && self.total_unsuccessful_probes < u32::MAX && match self.start_of_uptime {
            Some(us) => self.total_uptime <= u64::MAX - duration_since(now, us),
            None => true,
        }
    }

    /// Can the session be closed at `now` (see `can_finalize`)?
    pub fn can_finalize(&self, now: u64) -> (b: bool)
        ensures
            b == self@.can_finalize(now),
    {
        (match self.start_of_uptime {
            Some(us) => self.total_uptime <= u64::MAX - duration_since(now, us),
            None => true,
        }) && match self.start_of_downtime {
            Some(ds) => self.total_downtime <= u64::MAX - duration_since(now, ds),
            None => true,
        }
    }

    /// The summary of the statistics at time `now`.
    pub fn summary(&self, now: u64) -> (r: StatisticsSummary)
        ensures
            r.summarizes(self@, now),
    {
        let (min_rtt, avg_rtt, max_rtt) = self.get_rtt_statistics();
        StatisticsSummary {
            total_probes: self.total_successful_probes as u64 + self.total_unsuccessful_probes as u64,
            successful_probes: self.total_successful_probes,
            unsuccessful_probes: self.total_unsuccessful_probes,
            packet_loss_percentage: self.get_packet_loss_percentage(),
            min_rtt,
            avg_rtt,
            max_rtt,
            total_duration: self.get_total_duration(now),
            longest_uptime: self.longest_uptime,
            longest_downtime: self.longest_downtime,
            ended: self.end_time.is_some(),
        }
    }

    /// The share of failed probes, in hundredths of a percent rounded down.
    /// It is never above 100%, it is 0 when no probe failed (or none was
    /// sent), and it is 100% when every probe sent failed.
    pub fn get_packet_loss_percentage(&self) -> (p: u64)
        ensures
            p == self@.packet_loss(),
            p <= 10000,
            self.total_unsuccessful_probes == 0 ==> p == 0,
            self.total_successful_probes == 0 && self.total_unsuccessful_probes > 0 ==> p == 10000,
    {
        let total_probes: u64 = self.total_successful_probes as u64 + self.total_unsuccessful_probes as u64;
        if total_probes == 0 {
            return 0;
        }
        let lost: u64 = self.total_unsuccessful_probes as u64;
        proof {
            lemma_share_bounded(lost as nat, total_probes as nat);
        }
        lost * 10000 / total_probes
    }

    /// The smallest, mean (rounded down) and largest round-trip time, all
    /// zero when none was measured. The mean lies between the two others and
    /// both of those are measured values.
    pub fn get_rtt_statistics(&self) -> (r: (u64, u64, u64))
        ensures
            r == self@.rtt_statistics(),
            r.0 <= r.1 <= r.2,
            self.rtt_measurements@.len() > 0 ==> self.rtt_measurements@.contains(r.0)
                && self.rtt_measurements@.contains(r.2),
            forall|i: int| 0 <= i < self.rtt_measurements@.len()
                ==> r.0 <= #[trigger] self.rtt_measurements@[i] <= r.2,
    {
        let n = self.rtt_measurements.len();
        if n == 0 {
            return (0, 0, 0);
        }
        let ghost s = self.rtt_measurements@;
        let mut min = self.rtt_measurements[0];
        let mut max = self.rtt_measurements[0];
        let mut sum: u128 = 0;
        let mut i: usize = 0;
        assert(s.take(1).drop_last() =~= s.take(0));
        assert(s.take(1) =~= seq![s[0]]);
        while i < n
            invariant
                0 < n == s.len(),
                s == self.rtt_measurements@,
                i <= n,
                i == 0 ==> min == s[0] && max == s[0],
                i > 0 ==> min == seq_min(s.take(i as int)) && max == seq_max(s.take(i as int)),
                sum == seq_sum(s.take(i as int)),
                sum <= i * 0xffff_ffff_ffff_ffffu128,
            decreases n - i,
        {
            let x = self.rtt_measurements[i];
            let ghost t = s.take(i + 1);
            assert(t.drop_last() =~= s.take(i as int));
            assert(t.last() == x);
            if x < min {
                min = x;
            }
            if x > max {
                max = x;
            }
            proof {
                assert((i + 1) * 0xffff_ffff_ffff_ffffu128 == i * 0xffff_ffff_ffff_ffffu128 + 0xffff_ffff_ffff_ffffu128) by (nonlinear_arith);
                assert(i * 0xffff_ffff_ffff_ffffu128 <= 0xffff_ffff_ffff_ffffu128 * 0xffff_ffff_ffff_ffffu128) by (nonlinear_arith)
                    requires i < 0x1_0000_0000_0000_0000u128;
            }
            sum = sum + x as u128;
            i = i + 1;
        }
        assert(s.take(n as int) =~= s);
        proof {
            lemma_seq_min_max(s);
            lemma_seq_sum_bounds(s);
            lemma_mean_between(seq_sum(s), s.len(), seq_min(s) as nat, seq_max(s) as nat);
        }
        let avg = (sum / (n as u128)) as u64;
        (min, avg, max)
    }

    /// How long the session lasted: up to its end once closed, else up to `now`.
    pub fn get_total_duration(&self, now: u64) -> (d: u64)
        ensures
            d == self@.total_duration(now),
    {
        match self.end_time {
            Some(end) => duration_since(end, self.start_time),
            None => duration_since(now, self.start_time),
        }
    }
}

/// One probe outcome as a session records it: a success with its round-trip
/// time, or a failure, each at a time on the session clock.
pub enum ProbeEvent {
    Success { rtt: u64, at: u64 },
    Failure { at: u64 },
}

impl ProbeEvent {
    /// When the outcome was observed.
    pub open spec fn at(self) -> u64 {
        match self {
            ProbeEvent::Success { at, .. } => at,
            ProbeEvent::Failure { at } => at,
        }
    }

    /// Is this a success?
    pub open spec fn is_success(self) -> bool {
        self is Success
    }
}

/// The state after recording one outcome.
pub open spec fn apply_event(m: StatisticsView, e: ProbeEvent) -> StatisticsView {
    match e {
        ProbeEvent::Success { rtt, at } => m.after_success(rtt, at),
        ProbeEvent::Failure { at } => m.after_failure(at),
    }
}

/// The state after recording a sequence of outcomes in order.
pub open spec fn replay(m: StatisticsView, events: Seq<ProbeEvent>) -> StatisticsView
    decreases events.len(),
{
    if events.len() == 0 {
        m
    } else {
        apply_event(replay(m, events.drop_last()), events.last())
    }
}

/// How many of the outcomes are successes.
pub open spec fn count_successes(events: Seq<ProbeEvent>) -> nat
    decreases events.len(),
{
    if events.len() == 0 {
        0
    } else {
        count_successes(events.drop_last()) + if events.last().is_success() { 1nat } else { 0nat }
    }
}

/// How many of the outcomes are failures.
pub open spec fn count_failures(events: Seq<ProbeEvent>) -> nat
    decreases events.len(),
{
    if events.len() == 0 {
        0
    } else {
        count_failures(events.drop_last()) + if events.last().is_success() { 0nat } else { 1nat }
    }
}

/// The round-trip times of the successes, in order.
pub open spec fn success_rtts(events: Seq<ProbeEvent>) -> Seq<u64>
    decreases events.len(),
{
    if events.len() == 0 {
        Seq::empty()
    } else {
        match events.last() {
            ProbeEvent::Success { rtt, .. } => success_rtts(events.drop_last()).push(rtt),
            ProbeEvent::Failure { .. } => success_rtts(events.drop_last()),
        }
    }
}

/// How many successes end the sequence.
pub open spec fn trailing_successes(events: Seq<ProbeEvent>) -> nat
    decreases events.len(),
{
    if events.len() == 0 || !events.last().is_success() {
        0
    } else {
        trailing_successes(events.drop_last()) + 1
    }
}

/// How many failures end the sequence.
pub open spec fn trailing_failures(events: Seq<ProbeEvent>) -> nat
    decreases events.len(),
{
    if events.len() == 0 || events.last().is_success() {
        0
    } else {
        trailing_failures(events.drop_last()) + 1
    }
}

/// Are the outcomes in time order?
pub open spec fn in_time_order(events: Seq<ProbeEvent>) -> bool {
    forall|i: int, j: int| 0 <= i <= j < events.len() ==> #[trigger] events[i].at() <= #[trigger] events[j].at()
}

/// Counting law: whatever the outcomes recorded from a fresh session, the
/// totals count the successes and the failures, the round-trip times are
/// those of the successes in order, the running streaks are the successes
/// (failures) that end the sequence.
pub proof fn lemma_replay_counts(start: u64, events: Seq<ProbeEvent>)
    requires
        count_successes(events) < u32::MAX,
        count_failures(events) < u32::MAX,
    ensures
        ({
            let m = replay(StatisticsView::initial(start), events);
            &&& m.total_successful_probes == count_successes(events)
            &&& m.total_unsuccessful_probes == count_failures(events)
            &&& m.rtt_measurements == success_rtts(events)
            &&& m.ongoing_successful_probes == trailing_successes(events)
            &&& m.ongoing_unsuccessful_probes == trailing_failures(events)
        }),
    decreases events.len(),
{
    if events.len() > 0 {
        let p = events.drop_last();
        lemma_trailing_le_count(p);
        lemma_replay_counts(start, p);
    }
}

/// A trailing run is no longer than the count of its kind.
proof fn lemma_trailing_le_count(events: Seq<ProbeEvent>)
    ensures
        trailing_successes(events) <= count_successes(events),
        trailing_failures(events) <= count_failures(events),
    decreases events.len(),
{
    if events.len() > 0 {
        lemma_trailing_le_count(events.drop_last());
    }
}

/// Recording law: a success adds one to the successes and to the success
/// streak, ends the failure streak, appends its round-trip time, and is the
/// last success seen; a failure does the mirror image and keeps the
/// round-trip times; neither changes the other total, the session's start or
/// its end; closing the session changes no count, streak or round-trip time.
pub proof fn lemma_record_effects(m: StatisticsView, rtt: u64, now: u64)
    requires
        m.ongoing_successful_probes < u32::MAX,
        m.total_successful_probes < u32::MAX,
        m.ongoing_unsuccessful_probes < u32::MAX,
        m.total_unsuccessful_probes < u32::MAX,
    ensures
        ({
            let s = m.after_success(rtt, now);
            &&& s.total_successful_probes == m.total_successful_probes + 1
            &&& s.total_unsuccessful_probes == m.total_unsuccessful_probes
            &&& s.ongoing_successful_probes == m.ongoing_successful_probes + 1
            &&& s.ongoing_unsuccessful_probes == 0
            &&& s.rtt_measurements.len() == m.rtt_measurements.len() + 1
            &&& s.rtt_measurements.last() == rtt
            &&& s.rtt_measurements.take(m.rtt_measurements.len() as int) == m.rtt_measurements
            &&& s.last_successful_probe == Some(now)
            &&& s.last_unsuccessful_probe == m.last_unsuccessful_probe
            &&& s.start_of_downtime is None
            &&& s.start_of_uptime is Some
            &&& s.total_uptime == m.total_uptime
            &&& s.start_time == m.start_time && s.end_time == m.end_time
        }),
        ({
            let f = m.after_failure(now);
            &&& f.total_unsuccessful_probes == m.total_unsuccessful_probes + 1
            &&& f.total_successful_probes == m.total_successful_probes
            &&& f.ongoing_unsuccessful_probes == m.ongoing_unsuccessful_probes + 1
            &&& f.ongoing_successful_probes == 0
            &&& f.rtt_measurements == m.rtt_measurements
            &&& f.last_unsuccessful_probe == Some(now)
            &&& f.last_successful_probe == m.last_successful_probe
            &&& f.start_of_uptime is None
            &&& f.start_of_downtime is Some
            &&& f.total_downtime == m.total_downtime
            &&& f.start_time == m.start_time && f.end_time == m.end_time
        }),
        ({
            let c = m.after_finalize(now);
            &&& c.end_time == Some(now)
            &&& c.total_successful_probes == m.total_successful_probes
            &&& c.total_unsuccessful_probes == m.total_unsuccessful_probes
            &&& c.ongoing_successful_probes == m.ongoing_successful_probes
            &&& c.ongoing_unsuccessful_probes == m.ongoing_unsuccessful_probes
            &&& c.rtt_measurements == m.rtt_measurements
            &&& c.start_of_uptime == m.start_of_uptime && c.start_of_downtime == m.start_of_downtime
        }),
{
    assert(m.after_success(rtt, now).rtt_measurements.take(m.rtt_measurements.len() as int) =~= m.rtt_measurements);
}

/// Is `r` the larger of `a` and `b`?
pub open spec fn is_max_of(r: u64, a: u64, b: u64) -> bool {
    r >= a && r >= b && (r == a || r == b)
}

/// Longest-period law: recording an outcome or closing the session never
/// lowers the longest uptime or downtime. A success that closes a downtime
/// period of length `d` makes the longest downtime the larger of the previous
/// longest and `d`, and leaves the longest uptime as it was; a failure does the
/// same for uptime; closing the session does it for the period left open.
pub proof fn lemma_longest_periods(m: StatisticsView, rtt: u64, now: u64)
    ensures
        ({
            let s = m.after_success(rtt, now);
            &&& s.longest_downtime >= m.longest_downtime
            &&& s.longest_uptime == m.longest_uptime
            &&& m.start_of_downtime matches Some(ds) ==> is_max_of(
                s.longest_downtime,
                m.longest_downtime,
                if now >= ds { (now - ds) as u64 } else { 0 },
            )
            &&& m.start_of_downtime is None ==> s.longest_downtime == m.longest_downtime
        }),
        ({
            let f = m.after_failure(now);
            &&& f.longest_uptime >= m.longest_uptime
            &&& f.longest_downtime == m.longest_downtime
            &&& m.start_of_uptime matches Some(us) ==> is_max_of(
                f.longest_uptime,
                m.longest_uptime,
                if now >= us { (now - us) as u64 } else { 0 },
            )
            &&& m.start_of_uptime is None ==> f.longest_uptime == m.longest_uptime
        }),
        ({
            let c = m.after_finalize(now);
            &&& c.longest_uptime >= m.longest_uptime
            &&& c.longest_downtime >= m.longest_downtime
            &&& m.start_of_uptime matches Some(us) ==> is_max_of(
                c.longest_uptime,
                m.longest_uptime,
                if now >= us { (now - us) as u64 } else { 0 },
            )
            &&& m.start_of_downtime matches Some(ds) ==> is_max_of(
                c.longest_downtime,
                m.longest_downtime,
                if now >= ds { (now - ds) as u64 } else { 0 },
            )
        }),
{
}

/// Summary law: the summary's successful and failed probes are the numbers
/// of probes that succeeded and failed, so together they make the total; for
/// a consistent state the successes are as many as the round-trip times
/// measured; and after a sequence of outcomes recorded from a fresh session
/// they count the successes and the failures of that sequence.
pub proof fn lemma_summary_counts(r: StatisticsSummary, m: StatisticsView, now: u64)
    requires
        r.summarizes(m, now),
    ensures
        r.successful_probes + r.unsuccessful_probes == r.total_probes,
        m.wf() ==> r.successful_probes == m.rtt_measurements.len(),
        forall|start: u64, events: Seq<ProbeEvent>|
            m == replay(StatisticsView::initial(start), events) && count_successes(events) < u32::MAX
                && count_failures(events) < u32::MAX ==> r.successful_probes == count_successes(events)
                && r.unsuccessful_probes == count_failures(events),
{
    assert forall|start: u64, events: Seq<ProbeEvent>|
        m == replay(StatisticsView::initial(start), events) && count_successes(events) < u32::MAX
            && count_failures(events) < u32::MAX implies r.successful_probes == count_successes(events)
            && r.unsuccessful_probes == count_failures(events) by {
        lemma_replay_counts(start, events);
    }
}

/// The consistency predicate includes the core invariant.
pub proof fn lemma_wf_core_invariant(m: StatisticsView)
    requires
        m.wf(),
    ensures
        m.core_invariant(),
{
}

/// Recording one outcome, where it can be recorded, keeps the state consistent.
pub proof fn lemma_step_keeps_wf(m: StatisticsView, e: ProbeEvent)
    requires
        m.wf(),
        match e {
            ProbeEvent::Success { at, .. } => m.can_record_success(at),
            ProbeEvent::Failure { at } => m.can_record_failure(at),
        },
    ensures
        apply_event(m, e).wf(),
{
}

/// Time-accounting law: when the outcomes are recorded in time order and the
/// session is closed no earlier than the last of them, the uptime and the
/// downtime together cover exactly the time from the first outcome to the
/// close (and nothing when there was no outcome).
pub proof fn lemma_uptime_downtime_cover_session(start: u64, events: Seq<ProbeEvent>, end: u64)
    requires
        in_time_order(events),
        events.len() > 0 ==> events.last().at() <= end,
    ensures
        ({
            let m = replay(StatisticsView::initial(start), events).after_finalize(end);
            &&& events.len() == 0 ==> m.total_uptime + m.total_downtime == 0
            &&& events.len() > 0 ==> m.total_uptime + m.total_downtime == end - events[0].at()
            &&& m.end_time == Some(end)
            &&& events.len() > 0 && start <= events[0].at() ==> m.total_uptime + m.total_downtime
                <= m.total_duration(end)
        }),
{
    lemma_replay_keeps_start(StatisticsView::initial(start), events);
    if events.len() > 0 {
        lemma_replay_accounting(start, events);
    }
}

/// Recording outcomes leaves the session's start as it was.
proof fn lemma_replay_keeps_start(m: StatisticsView, events: Seq<ProbeEvent>)
    ensures
        replay(m, events).start_time == m.start_time,
    decreases events.len(),
{
    if events.len() > 0 {
        lemma_replay_keeps_start(m, events.drop_last());
    }
}

/// Consistency law over a session: outcomes recorded in time order (with
/// counts in range) keep the state consistent, and so does closing it no
/// earlier than the last of them; in particular the longest uptime and
/// downtime never exceed their totals.
pub proof fn lemma_session_stays_consistent(start: u64, events: Seq<ProbeEvent>, end: u64)
    requires
        in_time_order(events),
        events.len() > 0 ==> events.last().at() <= end,
        count_successes(events) < u32::MAX,
        count_failures(events) < u32::MAX,
    ensures
        replay(StatisticsView::initial(start), events).wf(),
        replay(StatisticsView::initial(start), events).after_finalize(end).wf(),
    decreases events.len(),
{
    let m0 = StatisticsView::initial(start);
    if events.len() > 0 {
        let p = events.drop_last();
        let e = events.last();
        assert forall|i: int, j: int| 0 <= i <= j < p.len() implies #[trigger] p[i].at() <= #[trigger] p[j].at() by {
            assert(p[i] == events[i]);
            assert(p[j] == events[j]);
        }
        lemma_trailing_le_count(p);
        lemma_replay_counts(start, p);
        if p.len() > 0 {
            assert(p.last() == events[events.len() - 2]);
            assert(events[events.len() - 2].at() <= e.at());
            lemma_session_stays_consistent(start, p, e.at());
            lemma_replay_accounting(start, p);
        } else {
            assert(replay(m0, p) == m0);
        }
        let m = replay(m0, p);
        lemma_step_keeps_wf(m, e);
        lemma_replay_accounting(start, events);
    }
}

/// While outcomes are recorded in time order, exactly one period is open; it
/// started between the first and the last outcome, and the closed periods
/// cover the time from the first outcome to its start.
proof fn lemma_replay_accounting(start: u64, events: Seq<ProbeEvent>)
    requires
        events.len() > 0,
        in_time_order(events),
    ensures
        ({
            let m = replay(StatisticsView::initial(start), events);
            let t0 = events[0].at();
            &&& (m.start_of_uptime is Some) != (m.start_of_downtime is Some)
            &&& m.start_of_uptime matches Some(s) ==> t0 <= s <= events.last().at()
                && m.total_uptime + m.total_downtime == s - t0
            &&& m.start_of_downtime matches Some(s) ==> t0 <= s <= events.last().at()
                && m.total_uptime + m.total_downtime == s - t0
        }),
    decreases events.len(),
{
    let p = events.drop_last();
    let e = events.last();
    if p.len() == 0 {
        assert(replay(StatisticsView::initial(start), p) == StatisticsView::initial(start));
        assert(events[0] == e);
    } else {
        assert forall|i: int, j: int| 0 <= i <= j < p.len() implies #[trigger] p[i].at() <= #[trigger] p[j].at() by {
            assert(p[i] == events[i]);
            assert(p[j] == events[j]);
        }
        lemma_replay_accounting(start, p);
        assert(p[0] == events[0]);
        assert(p.last() == events[events.len() - 2]);
        assert(events[events.len() - 2].at() <= events[events.len() - 1].at());
    }
}

/// Once closed, a session's duration is the time from its start to its close,
/// whatever the time at which it is asked.
pub proof fn lemma_finalized_duration(m: StatisticsView, end: u64, now: u64)
    ensures
        m.after_finalize(end).total_duration(now) == elapsed_since(end, m.start_time),
{
}

/// The packet loss moves with each record: a failure never lowers it and a
/// success never raises it.
pub proof fn lemma_loss_moves_with_records(m: StatisticsView, rtt: u64, now: u64)
    requires
        m.total_successful_probes < u32::MAX,
        m.total_unsuccessful_probes < u32::MAX,
    ensures
        m.after_failure(now).packet_loss() >= m.packet_loss(),
        m.after_success(rtt, now).packet_loss() <= m.packet_loss(),
{
    let s = m.total_successful_probes as nat;
    let u = m.total_unsuccessful_probes as nat;
    let t = s + u;
    assert(m.after_failure(now).total_probes() == t + 1);
    assert(m.after_failure(now).total_unsuccessful_probes == u + 1);
    assert(m.after_success(rtt, now).total_probes() == t + 1);
    assert(m.after_success(rtt, now).total_unsuccessful_probes == u);
    if t > 0 {
        // u / t <= (u + 1) / (t + 1), since u <= t
        assert((u * 10000) * (t + 1) <= ((u + 1) * 10000) * t) by (nonlinear_arith)
            requires u <= t;
        lemma_div_monotonic(u * 10000, t, (u + 1) * 10000, t + 1);
        // u / (t + 1) <= u / t
        assert((u * 10000) * t <= (u * 10000) * (t + 1)) by (nonlinear_arith);
        lemma_div_monotonic(u * 10000, t + 1, u * 10000, t);
    } else {
        assert(u == 0);
        assert(m.packet_loss() == 0);
        assert(m.after_success(rtt, now).packet_loss() == 0);
    }
}

/// Division rounded down keeps the order of fractions: `a / b <= c / d`
/// whenever `a * d <= c * b`.
proof fn lemma_div_monotonic(a: nat, b: nat, c: nat, d: nat)
    requires
        b > 0,
        d > 0,
        a * d <= c * b,
    ensures
        a / b <= c / d,
{
    let q = a / b;
    assert(q * b <= a) by (nonlinear_arith)
        requires b > 0, q == a / b;
    assert(q * b * d <= a * d) by (nonlinear_arith)
        requires q * b <= a, d > 0;
    assert(q * d * b <= c * b) by (nonlinear_arith)
        requires q * b * d <= a * d, a * d <= c * b;
    assert(q * d <= c) by (nonlinear_arith)
        requires q * d * b <= c * b, b > 0;
    assert(q <= c / d) by (nonlinear_arith)
        requires q * d <= c, d > 0;
}

/// A share of a total, in hundredths of a percent, is at most 100%.
proof fn lemma_share_bounded(part: nat, total: nat)
    requires
        part <= total,
        total > 0,
    ensures
        part * 10000 / total <= 10000,
        part == total ==> part * 10000 / total == 10000,
{
    assert(part * 10000 <= total * 10000) by (nonlinear_arith)
        requires part <= total;
    assert((part * 10000) / total <= (total * 10000) / total) by (nonlinear_arith)
        requires part * 10000 <= total * 10000, total > 0;
    assert((total * 10000) / total == 10000) by (nonlinear_arith)
        requires total > 0;
}

/// The smallest and largest elements bound every element and occur in the sequence.
pub proof fn lemma_seq_min_max(s: Seq<u64>)
    requires
        s.len() > 0,
    ensures
        s.contains(seq_min(s)),
        s.contains(seq_max(s)),
        forall|i: int| 0 <= i < s.len() ==> seq_min(s) <= #[trigger] s[i] <= seq_max(s),
    decreases s.len(),
{
    if s.len() == 1 {
        assert(s[0] == s[0]);
    } else {
        let p = s.drop_last();
        lemma_seq_min_max(p);
        assert forall|i: int| 0 <= i < s.len() implies seq_min(s) <= #[trigger] s[i] <= seq_max(s) by {
            if i < s.len() - 1 {
                assert(s[i] == p[i]);
            }
        }
        let jmin = choose|j: int| 0 <= j < p.len() && p[j] == seq_min(p);
        let jmax = choose|j: int| 0 <= j < p.len() && p[j] == seq_max(p);
        assert(s[jmin] == p[jmin]);
        assert(s[jmax] == p[jmax]);
        assert(s[s.len() - 1] == s.last());
    }
}

/// The sum of a nonempty sequence lies between its length times its
/// smallest and its length times its largest element.
pub proof fn lemma_seq_sum_bounds(s: Seq<u64>)
    requires
        s.len() > 0,
    ensures
        s.len() * seq_min(s) <= seq_sum(s) <= s.len() * seq_max(s),
    decreases s.len(),
{
    if s.len() == 1 {
        assert(s.drop_last().len() == 0);
        assert(seq_sum(s.drop_last()) == 0);
        assert(seq_sum(s) == s[0]);
    } else {
        let p = s.drop_last();
        lemma_seq_sum_bounds(p);
        lemma_seq_min_max(s);
        lemma_seq_min_max(p);
        let lo = seq_min(s) as int;
        let hi = seq_max(s) as int;
        let plo = seq_min(p) as int;
        let phi = seq_max(p) as int;
        let n = p.len() as int;
        assert(lo <= plo && phi <= hi);
        assert(n * lo <= n * plo) by (nonlinear_arith)
            requires lo <= plo, n >= 0;
        assert(n * phi <= n * hi) by (nonlinear_arith)
            requires phi <= hi, n >= 0;
        assert(s.last() == s[s.len() - 1]);
        assert((n + 1) * lo == n * lo + lo) by (nonlinear_arith);
        assert((n + 1) * hi == n * hi + hi) by (nonlinear_arith);
        assert(seq_sum(s) == seq_sum(p) + s.last());
        assert(s.len() == n + 1);
        assert(lo <= s.last() <= hi);
        assert((n + 1) * lo <= seq_sum(s));
        assert(seq_sum(s) <= (n + 1) * hi);
    }
}

/// The mean of values within `[lo, hi]`, rounded down, is within `[lo, hi]`.
proof fn lemma_mean_between(sum: nat, n: nat, lo: nat, hi: nat)
    requires
        n > 0,
        n * lo <= sum <= n * hi,
    ensures
        lo <= sum / n <= hi,
{
    assert(lo <= sum / n) by (nonlinear_arith)
        requires n > 0, n * lo <= sum;
    assert(sum / n <= hi) by (nonlinear_arith)
        requires n > 0, sum <= n * hi;
}

} // verus!
