//! The JSON report: the probes collected during a session and the summary of
//! its statistics. Serializing the report is left to the caller.
//!
//! Round-trip times and durations are microseconds; the packet loss is in
//! hundredths of a percent.

use vstd::prelude::*;

use crate::config::{Config, copy_opt_string, target_address};
use crate::statistics::{
    ProbeEvent, Statistics, StatisticsView, count_failures, count_successes, lemma_replay_counts, replay,
};
use crate::tcp_probe::ProbeResult;
use crate::timestamp::{rfc3339, rfc3339_text};

verus! {

/// One collected probe.
#[derive(Debug)]
pub struct JsonProbe {
    pub timestamp: String,
    pub success: bool,
    pub rtt: Option<u64>,
    pub source_addr: Option<String>,
    pub target_addr: String,
    pub error: Option<String>,
}

/// The summary of a session's statistics.
#[derive(Debug)]
pub struct JsonStatistics {
    pub total_probes: u64,
    pub successful_probes: u32,
    pub unsuccessful_probes: u32,
    pub packet_loss_percentage: u64,
    pub min_rtt: u64,
    pub avg_rtt: u64,
    pub max_rtt: u64,
    pub total_duration: u64,
    pub longest_uptime: u64,
    pub longest_downtime: u64,
}

/// The whole report.
#[derive(Debug)]
pub struct JsonOutput {
    pub target: String,
    pub probes: Vec<JsonProbe>,
    pub statistics: JsonStatistics,
}

/// The collected form of a probe result observed at `timestamp`: the
/// round-trip time is kept only for a success.
pub open spec fn probe_entry(result: ProbeResult, timestamp: Seq<char>) -> (Seq<char>, bool, Option<u64>, Option<String>, Seq<char>, Option<String>) {
    (
        timestamp,
        result.success,
        if result.success { Some(result.rtt) } else { None },
        result.source_addr,
        result.target_addr@,
        result.error,
    )
}

impl JsonProbe {
    /// The probe's fields, strings taken by their text.
    pub open spec fn entry(self) -> (Seq<char>, bool, Option<u64>, Option<String>, Seq<char>, Option<String>) {
        (self.timestamp@, self.success, self.rtt, self.source_addr, self.target_addr@, self.error)
    }

    /// A copy of the probe.
    pub fn copy(&self) -> (p: Self)
        ensures
            p == *self,
    {
        JsonProbe {
            timestamp: self.timestamp.clone(),
            success: self.success,
            rtt: self.rtt,
            source_addr: copy_opt_string(&self.source_addr),
            target_addr: self.target_addr.clone(),
            error: copy_opt_string(&self.error),
        }
    }
}

impl JsonStatistics {
    /// Does this summary describe the session state `m` at time `now`?
    pub open spec fn summarizes(self, m: StatisticsView, now: u64) -> bool {
        &&& self.total_probes == m.total_probes()
        &&& self.successful_probes == m.total_successful_probes
        &&& self.unsuccessful_probes == m.total_unsuccessful_probes
        &&& self.packet_loss_percentage == m.packet_loss()
        &&& (self.min_rtt, self.avg_rtt, self.max_rtt) == m.rtt_statistics()
        &&& self.total_duration == m.total_duration(now)
        &&& self.longest_uptime == m.longest_uptime
        &&& self.longest_downtime == m.longest_downtime
    }
}

/// JSON summary law: the summary's successful and failed probes are the
/// numbers of probes that succeeded and failed, so together they make the
/// total; for a consistent state the successes are as many as the round-trip
/// times measured; and after a sequence of outcomes recorded from a fresh
/// session they count its successes and failures.
pub proof fn lemma_json_summary_counts(j: JsonStatistics, m: StatisticsView, now: u64)
    requires
        j.summarizes(m, now),
    ensures
        j.successful_probes + j.unsuccessful_probes == j.total_probes,
        m.wf() ==> j.successful_probes == m.rtt_measurements.len(),
        forall|start: u64, events: Seq<ProbeEvent>|
            m == replay(StatisticsView::initial(start), events) && count_successes(events) < u32::MAX
                && count_failures(events) < u32::MAX ==> j.successful_probes == count_successes(events)
                && j.unsuccessful_probes == count_failures(events),
{
    assert forall|start: u64, events: Seq<ProbeEvent>|
        m == replay(StatisticsView::initial(start), events) && count_successes(events) < u32::MAX
            && count_failures(events) < u32::MAX implies j.successful_probes == count_successes(events)
            && j.unsuccessful_probes == count_failures(events) by {
        lemma_replay_counts(start, events);
    }
}

/// Collects the probes of a session and reports them with its statistics.
#[derive(Debug)]
pub struct JsonPrinter {
    config: Config,
    probes: Vec<JsonProbe>,
    pretty: bool,
}

impl JsonPrinter {
    /// The configuration that the printer reports on.
    pub closed spec fn spec_config(&self) -> Config {
        self.config
    }

    /// The probes collected so far, in order.
    pub closed spec fn spec_probes(&self) -> Seq<JsonProbe> {
        self.probes@
    }

    /// Whether the report is to be pretty-printed.
    pub closed spec fn spec_pretty(&self) -> bool {
        self.pretty
    }

    /// A printer with no probe collected yet.
    pub fn new(config: Config, pretty: bool) -> (p: Self)
        ensures
            p.spec_config() == config,
            p.spec_probes().len() == 0,
            p.spec_pretty() == pretty,
    {
        Self { config, probes: Vec::new(), pretty }
    }

    /// Whether the report is to be pretty-printed.
    pub fn pretty(&self) -> (b: bool)
        ensures
            b == self.spec_pretty(),
    {
        self.pretty
    }

    /// Collects the result of a probe made `now` nanoseconds after the Unix
    /// epoch, stamped with the RFC 3339 text of that instant.
    pub fn add_probe(&mut self, result: &ProbeResult, now: i64)
        ensures
            final(self).spec_config() == old(self).spec_config(),
            final(self).spec_pretty() == old(self).spec_pretty(),
            final(self).spec_probes().len() == old(self).spec_probes().len() + 1,
            final(self).spec_probes().drop_last() == old(self).spec_probes(),
            final(self).spec_probes().last().entry() == probe_entry(*result, rfc3339_text(now)),
    {
        let timestamp = rfc3339(now);
        self.add_probe_with_timestamp(result, timestamp);
    }

    /// Collects the result of a probe stamped `timestamp`.
    pub fn add_probe_with_timestamp(&mut self, result: &ProbeResult, timestamp: String)
        ensures
            final(self).spec_config() == old(self).spec_config(),
            final(self).spec_pretty() == old(self).spec_pretty(),
            final(self).spec_probes().len() == old(self).spec_probes().len() + 1,
            final(self).spec_probes().drop_last() == old(self).spec_probes(),
            final(self).spec_probes().last().entry() == probe_entry(*result, timestamp@),
    {
        let probe = JsonProbe {
            timestamp,
            success: result.success,
            rtt: if result.success {
                Some(result.rtt)
            } else {
                None
            },
            source_addr: copy_opt_string(&result.source_addr),
            target_addr: result.target_addr.clone(),
            error: copy_opt_string(&result.error),
        };
        self.probes.push(probe);
        proof {
            assert(self.probes@.drop_last() =~= old(self).probes@);
        }
    }

    /// The report at time `now`: the target, the collected probes, and the
    /// summary of `stats`.
    pub fn generate_output(&self, stats: &Statistics, now: u64) -> (out: JsonOutput)
        ensures
            out.target@ == target_address(self.spec_config().host@, self.spec_config().port),
            out.probes@ == self.spec_probes(),
            out.statistics.summarizes(stats@, now),
    {
        let (min_rtt, avg_rtt, max_rtt) = stats.get_rtt_statistics();
        let statistics = JsonStatistics {
            total_probes: stats.total_successful_probes as u64 + stats.total_unsuccessful_probes as u64,
            successful_probes: stats.total_successful_probes,
            unsuccessful_probes: stats.total_unsuccessful_probes,
            packet_loss_percentage: stats.get_packet_loss_percentage(),
            min_rtt,
            avg_rtt,
            max_rtt,
            total_duration: stats.get_total_duration(now),
            longest_uptime: stats.longest_uptime,
            longest_downtime: stats.longest_downtime,
        };
        let mut probes: Vec<JsonProbe> = Vec::new();
        let n = self.probes.len();
        let mut i: usize = 0;
        while i < n
            invariant
                i <= n,
                n == self.probes@.len(),
                probes@ == self.probes@.take(i as int),
            decreases n - i,
        {
            probes.push(self.probes[i].copy());
            proof {
                assert(probes@ =~= self.probes@.take(i + 1));
            }
            i = i + 1;
        }
        proof {
            assert(self.probes@.take(n as int) =~= self.probes@);
        }
        JsonOutput { target: self.config.get_target_address(), probes, statistics }
    }
}

} // verus!
